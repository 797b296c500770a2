use cargo_embassy::manifest::{format_manifest, ManifestError};

#[test]
fn formats_valid_manifest() {
    let text = "[package]\nname = \"demo\"\n\n\n\n[dependencies]\nfoo = \"1\"\n";
    let out = format_manifest(text).unwrap();
    assert!(!out.contains("\n\n\n"));
    assert!(out.contains("name = \"demo\""));
    assert!(out.contains("[dependencies]"));
}

#[test]
fn rejects_invalid_manifest() {
    assert_eq!(format_manifest("[package\nname ="), Err(ManifestError::Invalid));
}

#[test]
fn output_is_collapsed_canonical_rendering() {
    let text = "[package]\nname=\"demo\"\n\n\n\n[dependencies]\nfoo=\"1\"\n";
    let mut doc = text.parse::<toml_edit::Document>().unwrap();
    doc.as_table_mut().fmt();
    let expected = cargo_embassy::text::remove_triple_newlines(&doc.to_string());
    let out = format_manifest(text).unwrap();
    assert_eq!(out, expected);
    assert_ne!(out, text);
}
