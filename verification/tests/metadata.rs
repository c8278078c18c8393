use std::io::Read;
use sha2::Digest;
use rust_embed::file::{base64_text, embedded_file_from_contents, is_rfc2822_representable, timestamp_secs, FileTime, Metadata};

#[test]
fn metadata_accessors_return_parts() {
    let m = Metadata::__rust_embed_new(
        "hash".to_string(),
        "\"hash\"".to_string(),
        Some("Thu, 1 Jan 1970 00:00:00 +0000".to_string()),
        None,
    );
    assert_eq!(m.sha256_hash(), "hash");
    assert_eq!(m.etag(), "\"hash\"");
    assert_eq!(m.last_modified(), Some("Thu, 1 Jan 1970 00:00:00 +0000"));
    assert_eq!(m.mime_type(), None);
}

#[test]
fn hash_is_base64_of_sha256() {
    let file = embedded_file_from_contents("a.txt", b"abc".to_vec(), None, true);
    assert_eq!(file.metadata.sha256_hash(), "ungWv48Bz+pBQUDeXa4iI7ADYaOWF3qctBD/YfIAFa0=");
    assert_eq!(file.metadata.sha256_hash().len(), 44);
}

#[test]
fn etag_is_quoted_hash() {
    let file = embedded_file_from_contents("index.html", b"abc".to_vec(), None, true);
    assert_eq!(file.metadata.etag(), "\"ungWv48Bz+pBQUDeXa4iI7ADYaOWF3qctBD/YfIAFa0=\"");
}

#[test]
fn empty_file_hash() {
    let file = embedded_file_from_contents("empty", Vec::new(), None, true);
    assert_eq!(file.metadata.sha256_hash(), "47DEQpj8HBSa+/TImW+5JCeuQeRkm5NMpJWZG3hSuFU=");
    assert!(file.data_gzip.is_none());
    assert_eq!(file.metadata.mime_type(), None);
}

#[test]
fn base64_vectors() {
    assert_eq!(base64_text(b""), "");
    assert_eq!(base64_text(b"f"), "Zg==");
    assert_eq!(base64_text(b"fo"), "Zm8=");
    assert_eq!(base64_text(b"foo"), "Zm9v");
    assert_eq!(base64_text(b"foob"), "Zm9vYg==");
    assert_eq!(base64_text(b"fooba"), "Zm9vYmE=");
    assert_eq!(base64_text(b"foobar"), "Zm9vYmFy");
    assert_eq!(base64_text(&[0xfb, 0xff, 0xbf]), "+/+/");
}

#[test]
fn representable_dates() {
    assert!(is_rfc2822_representable(&FileTime { before_epoch: false, secs: 0 }));
    assert!(is_rfc2822_representable(&FileTime { before_epoch: false, secs: 253_402_300_799 }));
    assert!(!is_rfc2822_representable(&FileTime { before_epoch: false, secs: 253_402_300_800 }));
    assert!(is_rfc2822_representable(&FileTime { before_epoch: true, secs: 62_167_219_200 }));
    assert!(!is_rfc2822_representable(&FileTime { before_epoch: true, secs: 62_167_219_201 }));
    assert!(!is_rfc2822_representable(&FileTime { before_epoch: true, secs: 1 << 63 }));
    assert!(is_rfc2822_representable(&FileTime { before_epoch: false, secs: u64::MAX }));
}

#[test]
fn last_modified_is_rfc2822() {
    let epoch = embedded_file_from_contents("a.txt", b"a".to_vec(), Some(FileTime { before_epoch: false, secs: 0 }), true);
    assert_eq!(epoch.metadata.last_modified(), Some("Thu, 1 Jan 1970 00:00:00 +0000"));
    let later = embedded_file_from_contents("a.txt", b"a".to_vec(), Some(FileTime { before_epoch: false, secs: 1_000_000_000 }), true);
    assert_eq!(later.metadata.last_modified(), Some("Sun, 9 Sep 2001 01:46:40 +0000"));
    let before = embedded_file_from_contents("a.txt", b"a".to_vec(), Some(FileTime { before_epoch: true, secs: 86_400 }), true);
    assert_eq!(before.metadata.last_modified(), Some("Wed, 31 Dec 1969 00:00:00 +0000"));
}

#[test]
fn no_modification_time_gives_no_date() {
    let file = embedded_file_from_contents("a.txt", b"a".to_vec(), None, true);
    assert_eq!(file.metadata.last_modified(), None);
}

#[test]
fn timestamp_sign_follows_epoch_side() {
    assert_eq!(timestamp_secs(&FileTime { before_epoch: false, secs: 42 }), 42);
    assert_eq!(timestamp_secs(&FileTime { before_epoch: true, secs: 42 }), -42);
}

#[test]
fn mime_type_follows_extension() {
    let html = embedded_file_from_contents("index.html", b"<p></p>".to_vec(), None, true);
    assert_eq!(html.metadata.mime_type(), Some("text/html"));
    let png = embedded_file_from_contents("images/llama.png", vec![1, 2, 3], None, true);
    assert_eq!(png.metadata.mime_type(), Some("image/png"));
    let none = embedded_file_from_contents("LICENSE", vec![1, 2, 3], None, true);
    assert_eq!(none.metadata.mime_type(), None);
}

#[test]
fn gzip_data_kept_in_both_builds() {
    let data = "abcabcabc".repeat(200).into_bytes();
    for debug in [true, false] {
        let file = embedded_file_from_contents("a.txt", data.clone(), None, debug);
        let gz = file.data_gzip.expect("repetitive text compresses");
        assert!(gz.len() < data.len());
        let mut decoder = flate2::read::GzDecoder::new(gz.as_slice());
        let mut out = Vec::new();
        decoder.read_to_end(&mut out).unwrap();
        assert_eq!(out, data);
    }
}

#[test]
fn hash_is_accurate() {
    let data = b"<!DOCTYPE html>\n<html></html>\n".to_vec();
    let index_file = embedded_file_from_contents("index.html", data.clone(), None, true);
    let expected_hash: [u8; 32] = sha2::Sha256::digest(&data).into();
    assert_eq!(index_file.metadata.sha256_hash(), base64_text(&expected_hash));
}
