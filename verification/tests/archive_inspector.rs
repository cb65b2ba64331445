use retrospective_crate_version_tagging::archive::{
    commit_hash_of, extract_commit_hash, ArchiveError, ArchiveFault,
};
use std::io::Write;

fn tarball(files: &[(&str, Vec<u8>)]) -> Vec<u8> {
    let mut builder = tar::Builder::new(Vec::new());
    for (path, content) in files {
        let mut header = tar::Header::new_gnu();
        header.set_size(content.len() as u64);
        header.set_mode(0o644);
        header.set_cksum();
        builder
            .append_data(&mut header, path, content.as_slice())
            .unwrap();
    }
    builder.into_inner().unwrap()
}

fn gzip(bytes: &[u8], level: u32) -> Vec<u8> {
    let mut encoder = flate2::write::GzEncoder::new(Vec::new(), flate2::Compression::new(level));
    encoder.write_all(bytes).unwrap();
    encoder.finish().unwrap()
}

fn archive(files: &[(&str, &str)]) -> Vec<u8> {
    let owned: Vec<(&str, Vec<u8>)> = files
        .iter()
        .map(|(path, content)| (*path, content.as_bytes().to_vec()))
        .collect();
    gzip(&tarball(&owned), 6)
}

fn noise(length: usize) -> Vec<u8> {
    let mut state: u32 = 0x2545_f491;
    let mut bytes = Vec::with_capacity(length);
    for _ in 0..length {
        state = state.wrapping_mul(1_664_525).wrapping_add(1_013_904_223);
        bytes.push((state >> 24) as u8);
    }
    bytes
}

const INFO: &str = r#"{"git":{"sha1":"abc123"}}"#;

#[test]
fn metadata_file_alone_gives_its_commit() {
    let bytes = archive(&[(".cargo_vcs_info.json", INFO)]);
    assert_eq!(
        extract_commit_hash(&bytes).unwrap(),
        Some("abc123".to_string())
    );
}

#[test]
fn metadata_file_is_found_at_the_front() {
    let bytes = archive(&[
        (".cargo_vcs_info.json", INFO),
        ("Cargo.toml", "[package]"),
        ("src/lib.rs", "pub fn f() {}"),
    ]);
    assert_eq!(
        extract_commit_hash(&bytes).unwrap(),
        Some("abc123".to_string())
    );
}

#[test]
fn metadata_file_is_found_in_the_middle() {
    let bytes = archive(&[
        ("Cargo.toml", "[package]"),
        (".cargo_vcs_info.json", INFO),
        ("src/lib.rs", "pub fn f() {}"),
    ]);
    assert_eq!(
        extract_commit_hash(&bytes).unwrap(),
        Some("abc123".to_string())
    );
}

#[test]
fn metadata_file_is_found_at_the_back() {
    let bytes = archive(&[
        ("Cargo.toml", "[package]"),
        ("src/lib.rs", "pub fn f() {}"),
        (".cargo_vcs_info.json", INFO),
    ]);
    assert_eq!(
        extract_commit_hash(&bytes).unwrap(),
        Some("abc123".to_string())
    );
}

#[test]
fn metadata_file_is_known_by_its_last_path_component() {
    let bytes = archive(&[
        ("demo-0.1.0/Cargo.toml", "[package]"),
        ("demo-0.1.0/.cargo_vcs_info.json", INFO),
    ]);
    assert_eq!(
        extract_commit_hash(&bytes).unwrap(),
        Some("abc123".to_string())
    );
}

#[test]
fn similar_file_names_are_not_the_metadata_file() {
    let bytes = archive(&[
        ("cargo_vcs_info.json", INFO),
        (".cargo_vcs_info.json.orig", INFO),
        (".cargo_vcs_info.json/inner", INFO),
        (".CARGO_VCS_INFO.JSON", INFO),
    ]);
    assert_eq!(extract_commit_hash(&bytes).unwrap(), None);
}

#[test]
fn archive_without_metadata_file_gives_nothing() {
    let bytes = archive(&[("Cargo.toml", "[package]"), ("src/lib.rs", "pub fn f() {}")]);
    assert_eq!(extract_commit_hash(&bytes).unwrap(), None);
}

#[test]
fn empty_archive_gives_nothing() {
    let bytes = archive(&[]);
    assert_eq!(extract_commit_hash(&bytes).unwrap(), None);
}

#[test]
fn first_metadata_file_decides() {
    let bytes = archive(&[
        ("a/.cargo_vcs_info.json", r#"{"git":{"sha1":"first"}}"#),
        ("b/.cargo_vcs_info.json", r#"{"git":{"sha1":"second"}}"#),
    ]);
    assert_eq!(
        extract_commit_hash(&bytes).unwrap(),
        Some("first".to_string())
    );
}

#[test]
fn first_metadata_file_decides_even_without_a_commit() {
    let bytes = archive(&[
        ("a/.cargo_vcs_info.json", r#"{"path_in_vcs":""}"#),
        ("b/.cargo_vcs_info.json", r#"{"git":{"sha1":"second"}}"#),
    ]);
    assert_eq!(extract_commit_hash(&bytes).unwrap(), None);
}

#[test]
fn missing_field_is_no_error() {
    for content in [
        "{}",
        r#"{"git":{}}"#,
        r#"{"git":null}"#,
        r#"{"git":"abc123"}"#,
        r#"{"sha1":"abc123"}"#,
        r#"{"git":[{"sha1":"abc123"}]}"#,
        "[]",
        "null",
        "17",
    ] {
        let bytes = archive(&[(".cargo_vcs_info.json", content)]);
        assert_eq!(extract_commit_hash(&bytes).unwrap(), None, "{content}");
    }
}

#[test]
fn field_that_is_no_text_is_no_error() {
    for content in [
        r#"{"git":{"sha1":5}}"#,
        r#"{"git":{"sha1":null}}"#,
        r#"{"git":{"sha1":true}}"#,
        r#"{"git":{"sha1":["abc123"]}}"#,
        r#"{"git":{"sha1":{"value":"abc123"}}}"#,
    ] {
        let bytes = archive(&[(".cargo_vcs_info.json", content)]);
        assert_eq!(extract_commit_hash(&bytes).unwrap(), None, "{content}");
    }
}

#[test]
fn other_fields_do_not_matter() {
    let content = r#"{
  "git": {
    "sha1": "0123456789abcdef0123456789abcdef01234567",
    "dirty": true
  },
  "path_in_vcs": "crates/demo"
}"#;
    let bytes = archive(&[(".cargo_vcs_info.json", content)]);
    assert_eq!(
        extract_commit_hash(&bytes).unwrap(),
        Some("0123456789abcdef0123456789abcdef01234567".to_string())
    );
}

#[test]
fn empty_commit_text_is_still_a_commit() {
    let bytes = archive(&[(".cargo_vcs_info.json", r#"{"git":{"sha1":""}}"#)]);
    assert_eq!(extract_commit_hash(&bytes).unwrap(), Some(String::new()));
}

#[test]
fn metadata_file_that_is_no_json_is_an_error() {
    for content in ["", "not json", r#"{"git":{"sha1":"abc123"}"#, r#"{"git":{"sha1":"abc123"}} x"#]
    {
        let bytes = archive(&[(".cargo_vcs_info.json", content)]);
        let error = extract_commit_hash(&bytes).unwrap_err();
        assert!(matches!(error, ArchiveError::Metadata(_)), "{content}");
        assert_eq!(error.fault(), ArchiveFault::Malformed);
    }
}

#[test]
fn bytes_that_are_no_gzip_are_an_error() {
    let error = extract_commit_hash(b"this is no archive at all").unwrap_err();
    assert!(matches!(error, ArchiveError::Read(_)));
    assert_eq!(error.fault(), ArchiveFault::Unreadable);
}

#[test]
fn no_bytes_at_all_are_an_error() {
    let error = extract_commit_hash(&[]).unwrap_err();
    assert!(matches!(error, ArchiveError::Read(_)));
}

#[test]
fn gzip_of_something_else_is_an_error() {
    let bytes = gzip(b"plain text, compressed, but no tar archive inside of it", 6);
    let error = extract_commit_hash(&bytes).unwrap_err();
    assert!(matches!(error, ArchiveError::Read(_)));
}

#[test]
fn uncompressed_tar_is_an_error() {
    let bytes = tarball(&[(".cargo_vcs_info.json", INFO.as_bytes().to_vec())]);
    let error = extract_commit_hash(&bytes).unwrap_err();
    assert!(matches!(error, ArchiveError::Read(_)));
}

#[test]
fn damage_behind_the_metadata_file_is_not_seen() {
    let tar = tarball(&[
        (".cargo_vcs_info.json", INFO.as_bytes().to_vec()),
        ("blob.bin", noise(200_000)),
    ]);
    let whole = gzip(&tar, 0);
    let cut = &whole[..whole.len() / 2];
    assert_eq!(
        extract_commit_hash(cut).unwrap(),
        Some("abc123".to_string())
    );
}

#[test]
fn damage_in_front_of_the_metadata_file_is_an_error() {
    let tar = tarball(&[
        ("blob.bin", noise(200_000)),
        (".cargo_vcs_info.json", INFO.as_bytes().to_vec()),
    ]);
    let whole = gzip(&tar, 0);
    let cut = &whole[..whole.len() / 2];
    let error = extract_commit_hash(cut).unwrap_err();
    assert!(matches!(error, ArchiveError::Read(_)));
    assert_eq!(error.fault(), ArchiveFault::Unreadable);
}

#[test]
fn damaged_archive_without_metadata_file_is_an_error() {
    let tar = tarball(&[("Cargo.toml", b"[package]".to_vec()), ("blob.bin", noise(200_000))]);
    let whole = gzip(&tar, 0);
    let cut = &whole[..whole.len() / 2];
    assert!(extract_commit_hash(cut).is_err());
}

#[test]
fn commit_is_read_from_a_document() {
    let document: serde_json::Value =
        serde_json::from_str(r#"{"git":{"sha1":"abc123"},"path_in_vcs":""}"#).unwrap();
    assert_eq!(commit_hash_of(&document), Some("abc123".to_string()));
}

#[test]
fn document_without_commit_gives_nothing() {
    for text in [
        "{}",
        r#"{"git":{"sha2":"abc123"}}"#,
        r#"{"git":{"sha1":1}}"#,
        r#""abc123""#,
        r#"["git","sha1"]"#,
    ] {
        let document: serde_json::Value = serde_json::from_str(text).unwrap();
        assert_eq!(commit_hash_of(&document), None, "{text}");
    }
}
