use flate2::write::GzEncoder;
use flate2::Compression;
use graph_builder::extract::{extract_metadata_file, find_metadata_entry, ExtractError, METADATA_PATH};
use std::io::Write;

fn layer(files: &[(&str, &[u8])]) -> Vec<u8> {
    let mut builder = tar::Builder::new(Vec::new());
    for (path, data) in files {
        let mut header = tar::Header::new_gnu();
        header.set_size(data.len() as u64);
        header.set_mode(0o644);
        header.set_cksum();
        builder.append_data(&mut header, path, *data).unwrap();
    }
    let archive = builder.into_inner().unwrap();
    let mut gz = GzEncoder::new(Vec::new(), Compression::default());
    gz.write_all(&archive).unwrap();
    gz.finish().unwrap()
}

#[test]
fn metadata_file_is_extracted() {
    let blob = layer(&[
        ("etc/hosts", b"localhost"),
        ("release-manifests/release-metadata", b"{\"kind\":\"cincinnati-metadata-v0\"}"),
        ("release-manifests/other", b"x"),
    ]);
    let contents = extract_metadata_file(&blob).ok().unwrap();
    assert_eq!(contents, b"{\"kind\":\"cincinnati-metadata-v0\"}".to_vec());
}

#[test]
fn first_metadata_entry_wins() {
    let blob = layer(&[
        ("release-manifests/release-metadata", b"first"),
        ("release-manifests/release-metadata", b"second"),
    ]);
    assert_eq!(extract_metadata_file(&blob).ok().unwrap(), b"first".to_vec());
}

#[test]
fn layer_without_metadata_is_not_found() {
    let blob = layer(&[("release-manifests/release-metadata.bak", b"x"), ("a", b"b")]);
    assert!(matches!(extract_metadata_file(&blob), Err(ExtractError::NotFound)));
}

#[test]
fn blob_that_is_not_gzip_holds_no_metadata() {
    assert!(matches!(extract_metadata_file(b"not an archive"), Err(ExtractError::NotFound)));
    assert!(matches!(extract_metadata_file(b""), Err(ExtractError::NotFound)));
}

#[test]
fn metadata_entry_is_found_by_exact_path() {
    let paths = vec![
        None,
        Some("release-manifests".to_string()),
        Some(METADATA_PATH.to_string()),
        Some(METADATA_PATH.to_string()),
    ];
    assert_eq!(find_metadata_entry(&paths), Some(2));
    assert_eq!(find_metadata_entry(&vec![Some("x".to_string()), None]), None);
}
