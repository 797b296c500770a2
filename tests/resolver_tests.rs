use cargo_embassy::resolver::{toml_string_field, Git, ResolveError};

const PATCH: &str = "From 0a1b2c3d4e5f Mon Sep 17 00:00:00 2001\nFrom: Someone <someone@example.com>\nDate: Mon, 1 Jan 2024\nSubject: [PATCH] fix\n";

#[test]
fn commit_is_second_word_of_first_from_line() {
    assert_eq!(Git::latest_commit_from_patch(PATCH), Ok("0a1b2c3d4e5f".to_string()));
}

#[test]
fn commit_line_need_not_be_first() {
    let text = "preamble\nFromage\nFrom   abc123\tMon\n";
    assert_eq!(Git::latest_commit_from_patch(text), Ok("abc123".to_string()));
}

#[test]
fn commit_with_crlf_line_endings() {
    assert_eq!(Git::latest_commit_from_patch("From deadbeef\r\nx"), Ok("deadbeef".to_string()));
}

#[test]
fn commit_not_found() {
    assert_eq!(Git::latest_commit_from_patch(""), Err(ResolveError::NotFound));
    assert_eq!(Git::latest_commit_from_patch("x From abc\nFromabc"), Err(ResolveError::NotFound));
}

#[test]
fn commit_line_without_identifier() {
    assert_eq!(Git::latest_commit_from_patch("From \nabc"), Err(ResolveError::ParseError));
    assert_eq!(Git::latest_commit_from_patch("From    "), Err(ResolveError::ParseError));
}

const TOOLCHAIN: &str = "[toolchain]\nchannel = \"nightly-2023-10-02\"\ncomponents = [ \"rust-src\", \"rustfmt\" ]\n";

#[test]
fn toolchain_channel() {
    assert_eq!(Git::toolchain_channel_from(TOOLCHAIN), Ok("nightly-2023-10-02".to_string()));
}

#[test]
fn toolchain_channel_missing() {
    assert_eq!(Git::toolchain_channel_from("[toolchain]\ncomponents = []\n"), Err(ResolveError::MissingField));
    assert_eq!(Git::toolchain_channel_from("[other]\nchannel = \"x\"\n"), Err(ResolveError::MissingField));
}

#[test]
fn toolchain_channel_malformed() {
    assert_eq!(Git::toolchain_channel_from("[toolchain\nchannel = "), Err(ResolveError::ParseError));
    assert_eq!(Git::toolchain_channel_from("[toolchain]\nchannel = 3\n"), Err(ResolveError::ParseError));
}

#[test]
fn crate_version() {
    let text = "[package]\nname = \"embassy-time\"\nversion = \"0.1.5\"\nedition = \"2021\"\n\n[dependencies]\nfoo = \"1\"\n";
    assert_eq!(Git::crate_version_from(text), Ok("0.1.5".to_string()));
    assert_eq!(Git::crate_version_from("[package]\nname = \"x\"\n"), Err(ResolveError::MissingField));
}

#[test]
fn string_field_of_parsed_document() {
    let doc: toml::Value = toml::Value::Table(toml::from_str::<toml::Table>("[a]\nb = \"c\"\nn = 1\n").unwrap());
    assert_eq!(toml_string_field(&doc, "a", "b"), Ok("c".to_string()));
    assert_eq!(toml_string_field(&doc, "a", "n"), Err(ResolveError::ParseError));
    assert_eq!(toml_string_field(&doc, "a", "z"), Err(ResolveError::MissingField));
    assert_eq!(toml_string_field(&doc, "q", "b"), Err(ResolveError::MissingField));
}

#[test]
fn descriptor_paths() {
    assert_eq!(Git::crate_manifest_path("embassy-time"), Ok("embassy-time/Cargo.toml".to_string()));
    assert_eq!(Git::crate_manifest_path("embassy-boot-stm32"), Ok("embassy-boot/stm32/Cargo.toml".to_string()));
    assert_eq!(Git::crate_manifest_path("embassy-boot-rp-extra"), Ok("embassy-boot/rp/Cargo.toml".to_string()));
    assert_eq!(Git::crate_manifest_path("embassy-boot"), Ok("embassy-boot/Cargo.toml".to_string()));
}

#[test]
fn descriptor_path_unknown() {
    assert_eq!(Git::crate_manifest_path(""), Err(ResolveError::UnknownComponent));
    assert_eq!(Git::crate_manifest_path("embassy-boot-"), Err(ResolveError::UnknownComponent));
    assert_eq!(Git::crate_manifest_path("embassy-boot--x"), Err(ResolveError::UnknownComponent));
}

#[test]
fn descriptor_url() {
    assert_eq!(
        Git::crate_manifest_url("embassy-sync"),
        Ok("https://raw.githubusercontent.com/embassy-rs/embassy/main/embassy-sync/Cargo.toml".to_string())
    );
    assert_eq!(Git::crate_manifest_url(""), Err(ResolveError::UnknownComponent));
}
