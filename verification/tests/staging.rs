use filet::manifest::{
    blob_availability, chunk_file_name, is_manifest_filename, AppState, BlobAvailability,
    FileManifest,
};
use filet::text::{parse_bool, parse_u64, u64_to_string};

fn sample() -> FileManifest {
    FileManifest {
        id: "abc123XYZ_-0".to_string(),
        filename: "report.pdf".to_string(),
        size: 1048576,
        created_at_unix: 1700000000,
        expires_at_unix: 1700086400,
        chunk_size: 65536,
        chunk_count: 16,
        received_size: 1048576,
        complete: true,
    }
}

#[test]
fn manifest_text_form() {
    let expected = "id=abc123XYZ_-0\nfilename=report.pdf\nsize=1048576\ncreated_at_unix=1700000000\nexpires_at_unix=1700086400\nchunk_size=65536\nchunk_count=16\nreceived_size=1048576\ncomplete=true\n";
    assert_eq!(sample().to_text().as_str(), expected);
}

#[test]
fn manifest_round_trip() {
    let m = sample();
    let parsed = FileManifest::parse(m.to_text().as_str()).expect("round trip must parse");
    assert_eq!(parsed, m);
}

#[test]
fn manifest_round_trip_with_equals_in_filename() {
    // Only the first `=` of a line separates key from value.
    let mut m = sample();
    m.filename = "weird=name=with=equals".to_string();
    let parsed = FileManifest::parse(m.to_text().as_str()).expect("must parse");
    assert_eq!(parsed, m);
}

#[test]
fn manifest_round_trip_with_empty_filename() {
    let mut m = sample();
    m.filename = String::new();
    let parsed = FileManifest::parse(m.to_text().as_str()).expect("must parse");
    assert_eq!(parsed, m);
}

#[test]
fn parse_missing_key() {
    assert_eq!(FileManifest::parse(""), Err("manifest missing key"));
    assert_eq!(
        FileManifest::parse("filename=a\nsize=1\n"),
        Err("manifest missing key")
    );
}

#[test]
fn parse_invalid_number() {
    let text = "id=x\nfilename=a\nsize=abc\n";
    assert_eq!(FileManifest::parse(text), Err("invalid size"));
    let text = sample().to_text().replace("complete=true", "complete=yes");
    assert_eq!(FileManifest::parse(text.as_str()), Err("invalid complete"));
}

#[test]
fn parse_last_occurrence_wins() {
    let text = format!("size=1\n{}", sample().to_text());
    let parsed = FileManifest::parse(text.as_str()).expect("must parse");
    assert_eq!(parsed.size, 1048576);
    let text = format!("{}size=7\n", sample().to_text());
    let parsed = FileManifest::parse(text.as_str()).expect("must parse");
    assert_eq!(parsed.size, 7);
}

#[test]
fn parse_accepts_crlf_lines() {
    let text = sample().to_text().replace('\n', "\r\n");
    let parsed = FileManifest::parse(text.as_str()).expect("must parse");
    assert_eq!(parsed, sample());
}

#[test]
fn parse_skips_lines_without_equals() {
    let text = format!("just a comment line\n{}", sample().to_text());
    let parsed = FileManifest::parse(text.as_str()).expect("must parse");
    assert_eq!(parsed, sample());
}

#[test]
fn record_chunk_rejects_overflow() {
    let mut m = sample();
    m.size = 10;
    m.received_size = 0;
    m.chunk_count = 0;
    assert_eq!(m.record_chunk(10), Ok(()));
    assert_eq!(m.received_size, 10);
    assert_eq!(m.chunk_count, 1);
    // The next byte would exceed the declared size.
    assert_eq!(m.record_chunk(1), Err("payload exceeds declared size"));
    assert_eq!(m.received_size, 10);
    assert_eq!(m.chunk_count, 1);
}

#[test]
fn blob_availability_cases() {
    let m = sample();
    assert_eq!(blob_availability(&m, 1700000000), BlobAvailability::Ready);
    assert_eq!(blob_availability(&m, 1700086400), BlobAvailability::Expired);
    let mut incomplete = sample();
    incomplete.complete = false;
    assert_eq!(
        blob_availability(&incomplete, 1700000000),
        BlobAvailability::Incomplete
    );
    let mut short = sample();
    short.received_size = 1;
    assert_eq!(
        blob_availability(&short, 1700000000),
        BlobAvailability::Incomplete
    );
}

#[test]
fn expiry_check() {
    let m = sample();
    assert!(!m.is_expired(1700086399));
    assert!(m.is_expired(1700086400));
    assert!(m.is_expired(1700086401));
}

#[test]
fn manifest_filename_filter() {
    assert!(is_manifest_filename("abc123XYZ_-0.txt"));
    assert!(!is_manifest_filename("abc123XYZ_-0.tmp.txt"));
    assert!(!is_manifest_filename("abc123XYZ_-0.part"));
    assert!(!is_manifest_filename("txt"));
}

#[test]
fn chunk_file_names() {
    assert_eq!(chunk_file_name(1).as_str(), "00000001.part");
    assert_eq!(chunk_file_name(16).as_str(), "00000016.part");
    assert_eq!(chunk_file_name(123456789).as_str(), "123456789.part");
}

#[test]
fn storage_paths() {
    let state = AppState::new("./data/manifests".to_string(), "./data/chunks".to_string());
    assert_eq!(
        state.manifest_path("id42").as_str(),
        "./data/manifests/id42.txt"
    );
    assert_eq!(
        state.manifest_tmp_path("id42").as_str(),
        "./data/manifests/id42.tmp.txt"
    );
    assert_eq!(state.chunk_dir("id42").as_str(), "./data/chunks/id42");
    assert_eq!(
        state.chunk_tmp_dir("id42").as_str(),
        "./data/chunks/id42.tmp"
    );
    let copy = state.clone();
    assert_eq!(copy.manifests_dir, state.manifests_dir);
}

#[test]
fn decimal_rendering() {
    assert_eq!(u64_to_string(0).as_str(), "0");
    assert_eq!(u64_to_string(7).as_str(), "7");
    assert_eq!(u64_to_string(1048576).as_str(), "1048576");
    assert_eq!(
        u64_to_string(u64::MAX).as_str(),
        "18446744073709551615"
    );
}

#[test]
fn decimal_parsing() {
    assert_eq!(parse_u64("0"), Some(0));
    assert_eq!(parse_u64("007"), Some(7));
    assert_eq!(parse_u64("18446744073709551615"), Some(u64::MAX));
    assert_eq!(parse_u64("18446744073709551616"), None);
    assert_eq!(parse_u64(""), None);
    assert_eq!(parse_u64("12a"), None);
    assert_eq!(parse_u64("-1"), None);
}

#[test]
fn bool_parsing() {
    assert_eq!(parse_bool("true"), Some(true));
    assert_eq!(parse_bool("false"), Some(false));
    assert_eq!(parse_bool("True"), None);
    assert_eq!(parse_bool(""), None);
}
