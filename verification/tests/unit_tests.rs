use runzip::{
    basename_str, compression_ratio, dec_u64, glob_match, has_glob_chars, listing_totals,
    output_path, range_header, validate_head, write_decision, Cli, CompressionMethod, RangeEvent,
    RangeRead, RangeStep, WriteDecision, ZipError, ZipFileEntry,
};

fn entry(name: &str, method: CompressionMethod, csize: u64, usize_: u64) -> ZipFileEntry {
    let is_directory = name.ends_with('/');
    ZipFileEntry {
        file_name: name.to_string(),
        compression_method: method,
        compressed_size: csize,
        uncompressed_size: usize_,
        crc32: 0,
        lfh_offset: 0,
        last_mod_time: 0,
        last_mod_date: 0,
        is_directory,
    }
}

#[test]
fn method_round_trip_all() {
    for m in 0u16..=65535u16 {
        assert_eq!(CompressionMethod::from_u16(m).as_u16(), m);
    }
}

#[test]
fn method_variants() {
    assert_eq!(CompressionMethod::from_u16(0), CompressionMethod::Stored);
    assert_eq!(CompressionMethod::from_u16(8), CompressionMethod::Deflate);
    assert_eq!(CompressionMethod::from_u16(12), CompressionMethod::Unknown(12));
    assert_eq!(CompressionMethod::Stored.as_u16(), 0);
    assert_eq!(CompressionMethod::Deflate.as_u16(), 8);
}

#[test]
fn dos_date_time_unpack() {
    let mut e = entry("a", CompressionMethod::Stored, 0, 0);
    e.last_mod_date = 0x21;
    e.last_mod_time = 0x6000;
    assert_eq!(e.mod_date(), (1980, 1, 1));
    assert_eq!(e.mod_time(), (12, 0, 0));
}

#[test]
fn dos_time_second_is_even() {
    for t in [0u16, 1, 2, 29, 0x6000, 0x6001, 0xFFFF] {
        let mut e = entry("a", CompressionMethod::Stored, 0, 0);
        e.last_mod_time = t;
        let (_, _, second) = e.mod_time();
        assert_eq!(second % 2, 0);
        if t & 0x1F <= 29 {
            assert!(second <= 58);
        }
    }
}

#[test]
fn dos_date_time_fields() {
    let mut e = entry("a", CompressionMethod::Stored, 0, 0);
    // 2024-06-15, 13:45:28
    e.last_mod_date = ((2024 - 1980) << 9) | (6 << 5) | 15;
    e.last_mod_time = (13 << 11) | (45 << 5) | (28 / 2);
    assert_eq!(e.mod_date(), (2024, 6, 15));
    assert_eq!(e.mod_time(), (13, 45, 28));
}

#[test]
fn glob_matching() {
    assert!(glob_match("*.txt", "readme.txt"));
    assert!(glob_match("file?.dat", "file1.dat"));
    assert!(!glob_match("*.txt", "readme.md"));
    assert!(glob_match("*", ""));
    assert!(glob_match("a*c", "abbbc"));
    assert!(!glob_match("file?.dat", "file.dat"));
    assert!(glob_match("sub/*.txt", "sub/b.txt"));
}

#[test]
fn glob_char_detection() {
    assert!(has_glob_chars("*.txt"));
    assert!(has_glob_chars("file?"));
    assert!(!has_glob_chars("plain.txt"));
}

#[test]
fn ratio_values() {
    assert_eq!(compression_ratio(100, 40), 60);
    assert_eq!(compression_ratio(0, 10), 0);
    assert_eq!(compression_ratio(10, 20), 0);
    assert_eq!(compression_ratio(10240, 10240), 0);
    assert_eq!(compression_ratio(200, 50), 75);
}

#[test]
fn totals_skip_directories() {
    let entries = vec![
        entry("a.txt", CompressionMethod::Stored, 6, 6),
        entry("dir/", CompressionMethod::Stored, 0, 0),
        entry("sub/b.txt", CompressionMethod::Deflate, 2000, 10240),
    ];
    let (unc, comp, count) = listing_totals(&entries);
    assert_eq!(unc, 10246);
    assert_eq!(comp, 2006);
    assert_eq!(count, 2);
}

#[test]
fn decimal_rendering() {
    assert_eq!(dec_u64(0), "0");
    assert_eq!(dec_u64(7), "7");
    assert_eq!(dec_u64(1234567890), "1234567890");
    assert_eq!(dec_u64(u64::MAX), "18446744073709551615");
}

#[test]
fn head_validation() {
    assert_eq!(
        validate_head(404, Some("bytes"), Some("100")),
        Err(ZipError::HeadStatus(404))
    );
    assert_eq!(
        validate_head(200, None, Some("100")),
        Err(ZipError::NoRangeSupport)
    );
    assert_eq!(
        validate_head(200, Some("none"), Some("100")),
        Err(ZipError::NoRangeSupport)
    );
    assert_eq!(
        validate_head(200, Some("bytes"), None),
        Err(ZipError::NoContentLength)
    );
    assert_eq!(
        validate_head(200, Some("bytes"), Some("abc")),
        Err(ZipError::NoContentLength)
    );
    assert_eq!(
        validate_head(200, Some("bytes"), Some("99999999999999999999999")),
        Err(ZipError::NoContentLength)
    );
    assert_eq!(validate_head(200, Some("bytes"), Some("52428800")), Ok(52428800));
    assert_eq!(validate_head(204, Some("bytes, more"), Some("+7")), Ok(7));
}

#[test]
fn range_header_shape() {
    assert_eq!(range_header(0, 99), "bytes=0-99");
    assert_eq!(range_header(41943040, 41945087), "bytes=41943040-41945087");
}

#[test]
fn range_read_request_shape() {
    // A request of 2048 bytes at offset 40 MiB from a 50 MiB source asks
    // for exactly bytes O..=O+2047.
    let offset = 40 * 1024 * 1024u64;
    let size = 50 * 1024 * 1024u64;
    let (state, step) = RangeRead::begin(offset, 2048, size, 10);
    assert_eq!(
        step,
        RangeStep::Fetch { start: offset, end: offset + 2047, backoff_ms: 0 }
    );
    assert_eq!(state.expected, 2048);
    // Near the end of the source the range is clamped to the last byte.
    let (state2, step2) = RangeRead::begin(size - 10, 2048, size, 10);
    assert_eq!(
        step2,
        RangeStep::Fetch { start: size - 10, end: size - 1, backoff_ms: 0 }
    );
    assert_eq!(state2.expected, 10);
}

#[test]
fn range_read_chunks_complete() {
    let (state, _) = RangeRead::begin(0, 8, 100, 10);
    let mut buf = vec![0u8; 8];
    let bytes = vec![1u8, 2, 3, 4, 5];
    let (state, step) = state.apply_chunk(&mut buf, &bytes);
    assert_eq!(
        step,
        RangeStep::Fetch { start: 5, end: 7, backoff_ms: 0 }
    );
    assert_eq!(state.received, 5);
    let bytes2 = vec![6u8, 7, 8, 9, 10];
    let (state, step) = state.apply_chunk(&mut buf, &bytes2);
    assert_eq!(step, RangeStep::Done { count: 8 });
    // The copy keeps only what was owed and lands it in order.
    assert_eq!(buf, vec![1, 2, 3, 4, 5, 6, 7, 8]);
    // The counter equals the total of bytes ever landed.
    assert_eq!(state.transferred, 8);
}

#[test]
fn range_read_retry_budget() {
    // Ten consecutive transient failures exhaust the read; the first nine
    // back off linearly and refetch.
    let (mut state, _) = RangeRead::begin(0, 8, 100, 10);
    for k in 1u64..=9 {
        let (s2, step) = state.on_error(RangeEvent::Transient);
        assert_eq!(
            step,
            RangeStep::Fetch { start: 0, end: 7, backoff_ms: 500 * k }
        );
        state = s2;
    }
    let (_, step) = state.on_error(RangeEvent::Transient);
    assert_eq!(
        step,
        RangeStep::Failed { error: ZipError::MaxRetriesExceeded }
    );
}

#[test]
fn range_read_success_resets_retries() {
    // Only consecutive failures count: a successful chunk clears the
    // pending count, and the counter moves only on landed bytes.
    let (state, _) = RangeRead::begin(0, 8, 100, 10);
    let (state, _) = state.on_error(RangeEvent::Transient);
    let (state, _) = state.on_error(RangeEvent::Transient);
    assert_eq!(state.retry_count, 2);
    assert_eq!(state.transferred, 0);
    let mut buf = vec![0u8; 8];
    let (state, _) = state.apply_chunk(&mut buf, &vec![9u8, 9, 9]);
    assert_eq!(state.retry_count, 0);
    assert_eq!(state.transferred, 3);
}

#[test]
fn range_read_bad_status_fails() {
    let (state, _) = RangeRead::begin(0, 8, 100, 10);
    let (_, step) = state.on_error(RangeEvent::Status { code: 200 });
    assert_eq!(step, RangeStep::Failed { error: ZipError::BadStatus(200) });
    let (_, step) = state.on_error(RangeEvent::Fatal);
    assert_eq!(step, RangeStep::Failed { error: ZipError::Transport });
}

#[test]
fn write_decisions() {
    assert_eq!(write_decision(false, false, false), WriteDecision::Write);
    assert_eq!(write_decision(false, true, true), WriteDecision::Write);
    assert_eq!(write_decision(true, true, false), WriteDecision::SkipExisting);
    assert_eq!(write_decision(true, true, true), WriteDecision::SkipExisting);
    assert_eq!(write_decision(true, false, false), WriteDecision::SkipWithoutOverwrite);
    assert_eq!(write_decision(true, false, true), WriteDecision::Write);
}

#[test]
fn output_paths() {
    let name = "sub/dir/file.txt".to_string();
    assert_eq!(output_path(&name, false, &None), "sub/dir/file.txt");
    assert_eq!(output_path(&name, true, &None), "file.txt");
    assert_eq!(
        output_path(&name, false, &Some("out".to_string())),
        "out/sub/dir/file.txt"
    );
    assert_eq!(output_path(&name, true, &Some("out".to_string())), "out/file.txt");
    let plain = "file.txt".to_string();
    assert_eq!(output_path(&plain, true, &None), "file.txt");
}

#[test]
fn basenames() {
    assert_eq!(basename_str("a/b/c.txt"), "c.txt");
    assert_eq!(basename_str("plain"), "plain");
    assert_eq!(basename_str("dir/"), "");
    assert_eq!(basename_str(""), "");
}

#[test]
fn error_messages() {
    assert_eq!(ZipError::NotAZipFile.message(), "Not a valid ZIP file");
    assert_eq!(
        ZipError::UnsupportedMethod(12).message(),
        "Unsupported compression method: 12"
    );
    assert_eq!(ZipError::MaxRetriesExceeded.message(), "Max retries exceeded");
    assert_eq!(
        ZipError::HeadStatus(503).message(),
        "HTTP request failed with status: 503"
    );
}

fn cli(file: &str) -> Cli {
    Cli {
        file: file.to_string(),
        files: Vec::new(),
        list: false,
        verbose: false,
        pipe: false,
        extract_dir: None,
        exclude: Vec::new(),
        never_overwrite: false,
        overwrite: false,
        junk_paths: false,
        quiet: 0,
    }
}

#[test]
fn http_url_detection() {
    assert!(cli("http://example.com/a.zip").is_http_url());
    assert!(cli("https://example.com/a.zip").is_http_url());
    assert!(!cli("archive.zip").is_http_url());
    assert!(!cli("/tmp/archive.zip").is_http_url());
    assert!(!cli("ftp://example.com/a.zip").is_http_url());
}

#[test]
fn quiet_flags() {
    let mut c = cli("a.zip");
    assert!(!c.is_quiet());
    assert!(!c.is_very_quiet());
    c.quiet = 1;
    assert!(c.is_quiet());
    assert!(!c.is_very_quiet());
    c.quiet = 2;
    assert!(c.is_very_quiet());
    let mut p = cli("a.zip");
    p.pipe = true;
    assert!(p.is_quiet());
    assert!(!p.is_very_quiet());
}
