use tmphost::config::{Config, MAX_SIZE_IN_BYTES, RETAIN_SECS};
use tmphost::content_id::content_identifier;
use tmphost::naming::{choose_extension, extension_of_filename, StoredName};
use tmphost::upload::{check_declared_length, name_from_parts, Ingest, UploadError};

const PNG_HEAD: [u8; 16] = [
    0x89, 0x50, 0x4E, 0x47, 0x0D, 0x0A, 0x1A, 0x0A, 0x00, 0x00, 0x00, 0x0D, 0x49, 0x48, 0x44, 0x52,
];

fn ingest_all(chunks: &[&[u8]]) -> Ingest {
    let mut ingest = Ingest::new(MAX_SIZE_IN_BYTES);
    for c in chunks {
        assert_eq!(ingest.push_chunk(c), Ok(()));
    }
    ingest
}

#[test]
fn standard_config_limits() {
    let c = Config::standard();
    assert_eq!(c.max_size, 1_000_000);
    assert_eq!(c.ttl_secs, 1800);
    assert_eq!(RETAIN_SECS, 1800);
}

#[test]
fn identifier_is_six_lower_hex_digits_of_digest() {
    let digest = vec![0xab, 0x01, 0xff, 0x12, 0x34];
    assert_eq!(content_identifier(&digest), "ab01ff");
    let digest = vec![0x00, 0x0f, 0xf0];
    assert_eq!(content_identifier(&digest), "000ff0");
}

#[test]
fn identifier_is_sha256_prefix() {
    // SHA-256("hello") = 2cf24dba5fb0a30e...
    let ingest = ingest_all(&[b"hello"]);
    let name = ingest.finish(Some("greeting.txt")).unwrap();
    assert_eq!(name.id, "2cf24d");
    assert_eq!(name.ext, "txt");
    assert_eq!(name.file_name(), "2cf24d.txt");
    assert_eq!(name.viewer_name(), "v/2cf24d.txt");
}

#[test]
fn empty_content_identifier() {
    // SHA-256 of no bytes = e3b0c442...
    let ingest = ingest_all(&[]);
    let name = ingest.finish(Some("empty.txt")).unwrap();
    assert_eq!(name.file_name(), "e3b0c4.txt");
}

#[test]
fn identical_content_identical_identifier() {
    let a = ingest_all(&[b"some ", b"plain ", b"text"]);
    let b = ingest_all(&[b"some plain text"]);
    let na = a.finish(Some("a.txt")).unwrap();
    let nb = b.finish(Some("b.md")).unwrap();
    assert_eq!(na.id, nb.id);
    let c = ingest_all(&[b"some plain texT"]);
    assert_ne!(c.finish(Some("a.txt")).unwrap().id, na.id);
}

#[test]
fn oversize_stream_is_refused() {
    let mut ingest = Ingest::new(10);
    assert_eq!(ingest.push_chunk(&[1u8; 6]), Ok(()));
    assert_eq!(ingest.push_chunk(&[2u8; 5]), Err(UploadError::PayloadTooLarge));
    assert_eq!(ingest.total(), 6);
    assert_eq!(ingest.staged(), &[1u8; 6][..]);
    assert_eq!(ingest.push_chunk(&[3u8; 4]), Ok(()));
    assert_eq!(ingest.total(), 10);
    assert_eq!(ingest.push_chunk(&[4u8; 1]), Err(UploadError::PayloadTooLarge));
}

#[test]
fn oversize_at_standard_limit() {
    let mut ingest = Ingest::new(MAX_SIZE_IN_BYTES);
    let big = vec![0u8; 600_000];
    assert_eq!(ingest.push_chunk(&big), Ok(()));
    assert_eq!(ingest.push_chunk(&big), Err(UploadError::PayloadTooLarge));
    assert_eq!(ingest.total(), 600_000);
}

#[test]
fn declared_length_check() {
    assert_eq!(check_declared_length(None, MAX_SIZE_IN_BYTES), Ok(()));
    assert_eq!(check_declared_length(Some(1_000_000), MAX_SIZE_IN_BYTES), Ok(()));
    assert_eq!(
        check_declared_length(Some(1_000_001), MAX_SIZE_IN_BYTES),
        Err(UploadError::PayloadTooLarge)
    );
}

#[test]
fn png_signature_wins_over_declared_extension() {
    let ingest = ingest_all(&[&PNG_HEAD, b"rest of image"]);
    let name = ingest.finish(Some("picture.txt")).unwrap();
    assert_eq!(name.ext, "png");
    assert!(name.file_name().ends_with(".png"));
    let name = ingest.finish(None).unwrap();
    assert_eq!(name.ext, "png");
}

#[test]
fn jpeg_signature_without_filename() {
    let ingest = ingest_all(&[&[0xFF, 0xD8, 0xFF, 0xAA]]);
    assert_eq!(ingest.finish(None).unwrap().ext, "jpg");
}

#[test]
fn unrecognised_content_falls_back_to_declared_extension() {
    let ingest = ingest_all(&[b"just some words\n"]);
    let name = ingest.finish(Some("notes.txt")).unwrap();
    assert!(name.file_name().ends_with(".txt"));
    assert_eq!(ingest.finish(None).map(|n| n.ext), Err(UploadError::UnknownFileType));
    assert_eq!(
        ingest.finish(Some("README")).map(|n| n.ext),
        Err(UploadError::UnknownFileType)
    );
}

#[test]
fn declared_filename_extensions() {
    assert_eq!(extension_of_filename("a.txt"), Some("txt".to_string()));
    assert_eq!(extension_of_filename("dir/a.tar.gz"), Some("gz".to_string()));
    assert_eq!(extension_of_filename("../../x.sh"), Some("sh".to_string()));
    assert_eq!(extension_of_filename(".bashrc"), None);
    assert_eq!(extension_of_filename("a."), None);
    assert_eq!(extension_of_filename("a.b/c"), None);
    assert_eq!(extension_of_filename("noext"), None);
    assert_eq!(extension_of_filename(""), None);
    assert_eq!(extension_of_filename(".."), None);
}

#[test]
fn sniffed_extension_has_priority() {
    assert_eq!(choose_extension(Some("png".to_string()), Some("a.txt")), Some("png".to_string()));
    assert_eq!(choose_extension(None, Some("a.txt")), Some("txt".to_string()));
    assert_eq!(choose_extension(None, None), None);
}

#[test]
fn name_from_digest_and_extension() {
    let digest = vec![0x12, 0x34, 0x56, 0x78];
    let name = name_from_parts(&digest, None, Some("report.pdf")).unwrap();
    assert_eq!(name.file_name(), "123456.pdf");
    assert!(name_from_parts(&digest, None, None).is_err());
    let name = name_from_parts(&digest, Some("gif".to_string()), Some("x.png")).unwrap();
    assert_eq!(name.file_name(), "123456.gif");
}

#[test]
fn stored_name_references() {
    let n = StoredName { id: "abcdef".to_string(), ext: "png".to_string() };
    assert_eq!(n.file_name(), "abcdef.png");
    assert_eq!(n.viewer_name(), "v/abcdef.png");
}
