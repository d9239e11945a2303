use taskbench::digest::compute_hash;
use taskbench::error::UnitError;
use taskbench::record::{build_file_data, build_unit_file, check_hash, seal_record, verify_file_data, FileData};

#[test]
fn compute_hash_of_known_texts() {
    assert_eq!(
        compute_hash("abc"),
        "ba7816bf8f01cfea414140de5dae2223b00361a396177a9cb410ff61f20015ad"
    );
    assert_eq!(
        compute_hash(""),
        "e3b0c44298fc1c149afbf4c8996fb92427ae41e4649b934ca495991b7852b855"
    );
}

#[test]
fn compute_hash_is_lowercase_hex_of_the_utf8_bytes() {
    let hash = compute_hash("héllo");
    assert_eq!(hash.len(), 64);
    assert!(hash.chars().all(|c| c.is_ascii_digit() || ('a'..='f').contains(&c)));
    assert_ne!(hash, compute_hash("hello"));
}

#[test]
fn build_file_data_holds_hash_payload_and_timestamp() {
    let record = build_file_data("some content", 1_700_000_000_123).unwrap();
    assert_eq!(record.hash, compute_hash("some content"));
    assert_eq!(record.timestamp, 1_700_000_000_123);
    let compressed = hex::decode(&record.data).unwrap();
    assert_eq!(&compressed[..3], &[0x1f, 0x8b, 8]);
    let mut text = String::new();
    std::io::Read::read_to_string(&mut flate2::read::GzDecoder::new(&compressed[..]), &mut text).unwrap();
    assert_eq!(text, "some content");
    assert_eq!(record.data, hex::encode(&compressed));
    assert!(record.data.chars().all(|c| c.is_ascii_digit() || ('a'..='f').contains(&c)));
}

#[test]
fn a_record_as_built_reads_back_its_content() {
    let content = "line one\nline two with ünïcödé\n".repeat(50);
    let record = build_file_data(&content, 7).unwrap();
    assert_eq!(verify_file_data(&record), Ok(content));
}

#[test]
fn a_corrupted_hash_is_a_failure() {
    let mut record = build_file_data("payload", 1).unwrap();
    let first = if record.hash.starts_with('0') { "1" } else { "0" };
    record.hash.replace_range(0..1, first);
    assert_eq!(verify_file_data(&record), Err(UnitError::HashMismatch));
    record.hash = String::new();
    assert_eq!(verify_file_data(&record), Err(UnitError::HashMismatch));
}

#[test]
fn an_uppercase_hash_is_a_mismatch() {
    let mut record = build_file_data("payload", 1).unwrap();
    record.hash = record.hash.to_uppercase();
    assert_eq!(verify_file_data(&record), Err(UnitError::HashMismatch));
}

#[test]
fn an_uppercase_payload_is_read_all_the_same() {
    let mut record = build_file_data("payload", 1).unwrap();
    record.data = record.data.to_uppercase();
    assert_eq!(verify_file_data(&record), Ok("payload".to_string()));
}

#[test]
fn a_payload_that_is_no_hex_text_is_an_encoding_failure() {
    let good = build_file_data("payload", 1).unwrap();
    let odd = FileData { data: format!("{}0", good.data), ..good.clone() };
    assert_eq!(verify_file_data(&odd), Err(UnitError::Encoding));
    let strange = FileData { data: "zz".to_string(), ..good.clone() };
    assert_eq!(verify_file_data(&strange), Err(UnitError::Encoding));
    let wide = FileData { data: "é".to_string(), ..good };
    assert_eq!(verify_file_data(&wide), Err(UnitError::Encoding));
}

#[test]
fn a_payload_that_is_no_gzip_stream_is_a_compression_failure() {
    let good = build_file_data("payload", 1).unwrap();
    let empty = FileData { data: String::new(), ..good.clone() };
    assert_eq!(verify_file_data(&empty), Err(UnitError::Compression));
    let junk = FileData { data: "00ff00ff".to_string(), ..good.clone() };
    assert_eq!(verify_file_data(&junk), Err(UnitError::Compression));
    let cut = FileData { data: good.data[..good.data.len() - 8].to_string(), ..good };
    assert_eq!(verify_file_data(&cut), Err(UnitError::Compression));
}

#[test]
fn a_payload_of_other_content_is_a_mismatch() {
    let one = build_file_data("one", 1).unwrap();
    let two = build_file_data("two", 1).unwrap();
    let mixed = FileData { hash: one.hash, data: two.data, timestamp: 1 };
    assert_eq!(verify_file_data(&mixed), Err(UnitError::HashMismatch));
}

#[test]
fn seal_record_maps_a_failed_compression() {
    let failed = Err(std::io::Error::new(std::io::ErrorKind::Other, "no room"));
    assert_eq!(seal_record("content", failed, 5), Err(UnitError::Compression));
}

#[test]
fn seal_record_encodes_the_stream_it_is_given() {
    let record = seal_record("content", Ok(vec![0x00, 0x0f, 0xa5, 0xff]), 5).unwrap();
    assert_eq!(record.data, "000fa5ff");
    assert_eq!(record.hash, compute_hash("content"));
    assert_eq!(record.timestamp, 5);
}

#[test]
fn check_hash_compares_the_two_hashes() {
    let a = "abc".to_string();
    let b = "abd".to_string();
    assert_eq!(check_hash(&a, &a.clone(), "text".to_string()), Ok("text".to_string()));
    assert_eq!(check_hash(&a, &b, "text".to_string()), Err(UnitError::HashMismatch));
}

#[test]
fn build_unit_file_stores_the_generated_content() {
    let record = build_unit_file(1, "task4", 2, 99).unwrap();
    let content = taskbench::content::generate_large_content(1, "task4_2");
    assert_eq!(record.hash, compute_hash(&content));
    assert_eq!(record.timestamp, 99);
    assert_eq!(verify_file_data(&record), Ok(content));
}
