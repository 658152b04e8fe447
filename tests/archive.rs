use vegh_core::{
    checked_payload, get_file_content, get_metadata, is_metadata_path, list_files,
    listing_from_headers, ArchiveError, EntryHeader,
};

fn tar_of(entries: &[(&str, &[u8])]) -> Vec<u8> {
    let mut builder = tar::Builder::new(Vec::new());
    for (path, body) in entries {
        let mut header = tar::Header::new_gnu();
        header.set_size(body.len() as u64);
        header.set_mode(0o644);
        builder.append_data(&mut header, path, *body).unwrap();
    }
    builder.into_inner().unwrap()
}

fn snapshot(entries: &[(&str, &[u8])]) -> Vec<u8> {
    let tar_bytes = tar_of(entries);
    ruzstd::encoding::compress_to_vec(
        tar_bytes.as_slice(),
        ruzstd::encoding::CompressionLevel::Fastest,
    )
}

const PLAIN_META: &[u8] = br#"{"author":"a","timestamp":1000,"comment":"c","tool_version":"v1"}"#;

#[test]
fn scenario_one_file_snapshot() {
    let data = snapshot(&[(".vegh.json", PLAIN_META), ("notes.txt", b"hello")]);
    let meta = get_metadata(&data).unwrap();
    assert_eq!(meta.author, "a");
    assert_eq!(meta.timestamp, 1000);
    assert_eq!(meta.comment, "c");
    assert_eq!(meta.tool_version, "v1");
    assert_eq!(meta.format_version, "1");
    assert_eq!(meta.timestamp_human, None);
    let listed = list_files(&data).unwrap();
    assert_eq!(listed.len(), 1);
    assert_eq!(listed[0].path, "notes.txt");
    assert_eq!(listed[0].size, 5);
    assert!(listed[0].is_file);
    assert_eq!(get_file_content(&data, "notes.txt").unwrap(), b"hello".to_vec());
}

#[test]
fn listing_skips_metadata_and_keeps_order() {
    let data = snapshot(&[
        ("b.txt", b"bb"),
        (".vegh.json", PLAIN_META),
        ("a/c.txt", b"ccc"),
        ("empty", b""),
    ]);
    let listed = list_files(&data).unwrap();
    let paths: Vec<&str> = listed.iter().map(|e| e.path.as_str()).collect();
    assert_eq!(paths, vec!["b.txt", "a/c.txt", "empty"]);
    let sizes: Vec<u64> = listed.iter().map(|e| e.size).collect();
    assert_eq!(sizes, vec![2, 3, 0]);
    assert!(listed.iter().all(|e| e.is_file && e.path != ".vegh.json"));
}

#[test]
fn every_listed_path_extracts_with_its_size() {
    let data = snapshot(&[
        (".vegh.json", PLAIN_META),
        ("one", b"1"),
        ("two", b"22"),
        ("dir/three", b"333"),
        ("blank", b""),
    ]);
    for entry in list_files(&data).unwrap() {
        let bytes = get_file_content(&data, &entry.path).unwrap();
        assert_eq!(bytes.len() as u64, entry.size);
    }
    assert_eq!(get_file_content(&data, "dir/three").unwrap(), b"333".to_vec());
}

#[test]
fn early_file_before_a_large_entry() {
    let big = vec![7u8; 8 * 1024 * 1024];
    let data = snapshot(&[
        (".vegh.json", PLAIN_META),
        ("small.txt", b"tiny"),
        ("large.bin", big.as_slice()),
    ]);
    assert_eq!(get_file_content(&data, "small.txt").unwrap(), b"tiny".to_vec());
    let listed = list_files(&data).unwrap();
    assert_eq!(listed[1].size, 8 * 1024 * 1024);
}

#[test]
fn missing_file_is_not_found() {
    let data = snapshot(&[(".vegh.json", PLAIN_META), ("notes.txt", b"hello")]);
    assert_eq!(get_file_content(&data, "other.txt"), Err(ArchiveError::NotFound));
    assert_eq!(get_file_content(&data, "notes"), Err(ArchiveError::NotFound));
}

#[test]
fn missing_metadata_is_not_found() {
    let data = snapshot(&[("notes.txt", b"hello")]);
    assert!(matches!(get_metadata(&data), Err(ArchiveError::NotFound)));
    assert_eq!(list_files(&data).unwrap().len(), 1);
}

#[test]
fn first_metadata_entry_wins() {
    let second: &[u8] = br#"{"author":"z","timestamp":2,"comment":"y","tool_version":"x"}"#;
    let data = snapshot(&[(".vegh.json", PLAIN_META), (".vegh.json", second)]);
    let meta = get_metadata(&data).unwrap();
    assert_eq!(meta.author, "a");
    assert_eq!(list_files(&data).unwrap().len(), 0);
}

#[test]
fn newer_metadata_keeps_its_fields() {
    let meta_text: &[u8] = br#"{"author":"bob","timestamp":-5,"timestamp_human":"then","comment":"","tool_version":"pv 1.0","format_version":"2"}"#;
    let data = snapshot(&[(".vegh.json", meta_text)]);
    let meta = get_metadata(&data).unwrap();
    assert_eq!(meta.author, "bob");
    assert_eq!(meta.timestamp, -5);
    assert_eq!(meta.timestamp_human, Some("then".to_string()));
    assert_eq!(meta.format_version, "2");
}

#[test]
fn metadata_without_a_required_field_is_a_parse_error() {
    let meta_text: &[u8] = br#"{"author":"a","timestamp":1000,"comment":"c"}"#;
    let data = snapshot(&[(".vegh.json", meta_text)]);
    assert!(matches!(get_metadata(&data), Err(ArchiveError::Parse)));
}

#[test]
fn metadata_that_is_not_json_is_a_parse_error() {
    let data = snapshot(&[(".vegh.json", b"not json at all")]);
    assert!(matches!(get_metadata(&data), Err(ArchiveError::Parse)));
}

#[test]
fn bytes_that_are_not_compressed_fail_to_decode() {
    let data = b"plainly not a compressed stream".to_vec();
    assert!(matches!(list_files(&data), Err(ArchiveError::Decode)));
    assert!(matches!(get_metadata(&data), Err(ArchiveError::Decode)));
    assert_eq!(get_file_content(&data, "x"), Err(ArchiveError::Decode));
}

#[test]
fn compressed_bytes_that_are_not_framed_fail() {
    let data = ruzstd::encoding::compress_to_vec(
        &b"short and not an archive"[..],
        ruzstd::encoding::CompressionLevel::Fastest,
    );
    assert!(matches!(list_files(&data), Err(ArchiveError::Frame)));
    assert_eq!(get_file_content(&data, "x"), Err(ArchiveError::Frame));
}

#[test]
fn payload_must_match_declared_size() {
    assert_eq!(checked_payload(vec![1, 2, 3], 3), Ok(vec![1, 2, 3]));
    assert_eq!(checked_payload(vec![1, 2], 3), Err(ArchiveError::Frame));
    assert_eq!(checked_payload(vec![], 0), Ok(vec![]));
}

#[test]
fn reserved_path_is_exact() {
    assert!(is_metadata_path(".vegh.json"));
    assert!(!is_metadata_path("vegh.json"));
    assert!(!is_metadata_path(".vegh.json/"));
    assert!(!is_metadata_path("a/.vegh.json"));
}

#[test]
fn listing_from_headers_filters_metadata() {
    let headers = vec![
        EntryHeader { path: "x".to_string(), size: 1 },
        EntryHeader { path: ".vegh.json".to_string(), size: 60 },
        EntryHeader { path: "y".to_string(), size: 0 },
    ];
    let listed = listing_from_headers(&headers);
    assert_eq!(listed.len(), 2);
    assert_eq!((listed[0].path.as_str(), listed[0].size, listed[0].is_file), ("x", 1, true));
    assert_eq!((listed[1].path.as_str(), listed[1].size, listed[1].is_file), ("y", 0, true));
}

#[test]
fn reserved_path_extracts_the_metadata_bytes() {
    let data = snapshot(&[("notes.txt", b"hello"), (".vegh.json", PLAIN_META)]);
    assert_eq!(get_file_content(&data, ".vegh.json").unwrap(), PLAIN_META.to_vec());
}

#[test]
fn corrupt_later_header_fails_the_whole_listing() {
    let mut tar_bytes = tar_of(&[("first.txt", b"abc"), ("second.txt", b"def")]);
    for b in &mut tar_bytes[1024 + 148..1024 + 156] {
        *b = b'x';
    }
    let data = ruzstd::encoding::compress_to_vec(
        tar_bytes.as_slice(),
        ruzstd::encoding::CompressionLevel::Fastest,
    );
    assert!(matches!(list_files(&data), Err(ArchiveError::Frame)));
    assert_eq!(get_file_content(&data, "first.txt").unwrap(), b"abc".to_vec());
    assert_eq!(get_file_content(&data, "second.txt"), Err(ArchiveError::Frame));
}

#[test]
fn empty_buffer_fails_to_decode() {
    assert!(matches!(list_files(&[]), Err(ArchiveError::Decode)));
}
