use cargo_embassy::components::{EmbassyCrates, Vendor};
use cargo_embassy::templates::{
    metadata_queries, GeneratorConfig, Query, ResolvedMetadata, TemplateBuilder, TemplateError,
};
use cargo_embassy::tree::TemplateItem;

fn config(vendor: Vendor, no_pin: bool, workspace: bool) -> GeneratorConfig {
    GeneratorConfig {
        name: "demo".to_string(),
        vendor,
        mcu: "MCU1".to_string(),
        target: "triple-A".to_string(),
        no_pin,
        workspace,
    }
}

fn metadata(vendor_crate: &str) -> ResolvedMetadata {
    ResolvedMetadata {
        commit: Some("abc123".to_string()),
        channel: "nightly-2024-01-01".to_string(),
        versions: vec![
            (vendor_crate.to_string(), "1.2.0".to_string()),
            ("embassy-executor".to_string(), "0.3.0".to_string()),
            ("embassy-time".to_string(), "0.4.0".to_string()),
            ("embassy-sync".to_string(), "0.5.0".to_string()),
            ("embassy-futures".to_string(), "0.6.0".to_string()),
        ],
    }
}

fn files(items: &[TemplateItem]) -> Vec<(String, String)> {
    items
        .iter()
        .filter_map(|i| match i {
            TemplateItem::File { content, path } => Some((path.clone(), content.clone())),
            TemplateItem::Dir { .. } => None,
        })
        .collect()
}

fn content_of(items: &[TemplateItem], path: &str) -> String {
    files(items).into_iter().find(|(p, _)| p == path).map(|(_, c)| c).unwrap()
}

#[test]
fn end_to_end_single_package() {
    let b = TemplateBuilder::new(config(Vendor::St, false, false), &metadata("embassy-stm32")).unwrap();
    let items = b.build();
    assert_eq!(b.root_path(), "demo");
    assert_eq!(items[0], TemplateItem::Dir { path: "./demo".to_string() });
    let manifest = content_of(&items, "./demo/Cargo.toml");
    assert!(manifest.contains("embassy-stm32 = { version = \"1.2.0\""));
    assert!(manifest.contains("\"MCU1\""));
    assert!(manifest.contains("[patch.crates-io]"));
    assert!(manifest.contains(
        "embassy-stm32 = { git = \"https://github.com/embassy-rs/embassy\", rev = \"abc123\" }"
    ));
    assert!(manifest.contains("embassy-executor = { version = \"0.3.0\""));
    let toolchain = content_of(&items, "./demo/rust-toolchain.toml");
    assert!(toolchain.contains("channel = \"nightly-2024-01-01\""));
    assert!(toolchain.contains("targets = [ \"triple-A\" ]"));
    let config = content_of(&items, "./demo/.cargo/config.toml");
    assert!(config.contains("--chip MCU1 "));
    assert!(config.contains("target = \"triple-A\""));
    let main = content_of(&items, "./demo/src/main.rs");
    assert!(main.contains("let p = embassy_stm32::init(Default::default());"));
}

#[test]
fn single_package_layout() {
    let b = TemplateBuilder::new(config(Vendor::Nrf, false, false), &metadata("embassy-nrf")).unwrap();
    let items = b.build();
    let paths: Vec<String> = files(&items).into_iter().map(|(p, _)| p).collect();
    assert_eq!(
        paths,
        vec![
            "./demo/.cargo/config.toml",
            "./demo/.vscode/settings.json",
            "./demo/src/main.rs",
            "./demo/.gitignore",
            "./demo/build.rs",
            "./demo/Cargo.toml",
            "./demo/rust-toolchain.toml",
        ]
    );
    assert_eq!(paths.iter().filter(|p| p.ends_with("/Cargo.toml")).count(), 1);
    assert_eq!(paths.iter().filter(|p| p.ends_with("/lib.rs")).count(), 0);
    assert_eq!(items.len(), 11);
}

#[test]
fn workspace_layout() {
    let b = TemplateBuilder::new(config(Vendor::Rp, false, true), &metadata("embassy-rp")).unwrap();
    let items = b.build();
    let paths: Vec<String> = files(&items).into_iter().map(|(p, _)| p).collect();
    assert_eq!(paths.iter().filter(|p| p.ends_with("/Cargo.toml")).count(), 3);
    assert_eq!(paths.iter().filter(|p| p.ends_with("/lib.rs")).count(), 1);
    let ws = content_of(&items, "./demo/Cargo.toml");
    assert!(ws.starts_with("[workspace]"));
    assert!(ws.contains("embassy-rp = { version = \"1.2.0\", features = [\"defmt\", \"nightly\", \"time-driver\"] }"));
    assert!(ws.contains("rev = \"abc123\""));
    let app = content_of(&items, "./demo/crates/app/Cargo.toml");
    assert!(app.contains("embassy-rp = { workspace = true }"));
    assert!(!app.contains("[patch.crates-io]"));
    assert_eq!(content_of(&items, "./demo/crates/my_lib/src/lib.rs"), "#![no_std]");
    assert!(content_of(&items, "./demo/crates/app/src/main.rs").contains("embassy_rp::init"));
}

#[test]
fn unpinned_manifest_has_no_revision() {
    let mut md = metadata("embassy-stm32");
    md.commit = None;
    let b = TemplateBuilder::new(config(Vendor::St, true, false), &md).unwrap();
    let manifest = content_of(&b.build(), "./demo/Cargo.toml");
    assert!(manifest.contains("[patch.crates-io]"));
    assert!(!manifest.contains("rev"));
    assert!(manifest.contains("embassy-time = { git = \"https://github.com/embassy-rs/embassy\" }"));
}

#[test]
fn pinned_manifest_names_commit_once_per_entry() {
    let b = TemplateBuilder::new(config(Vendor::St, false, false), &metadata("embassy-stm32")).unwrap();
    let manifest = content_of(&b.build(), "./demo/Cargo.toml");
    assert_eq!(manifest.matches("rev = \"abc123\"").count(), 5);
    assert_eq!(manifest.matches("rev =").count(), 5);
}

#[test]
fn missing_version_is_reported() {
    let mut md = metadata("embassy-stm32");
    md.versions.remove(2);
    assert_eq!(
        TemplateBuilder::new(config(Vendor::St, false, false), &md).err(),
        Some(TemplateError::MissingVersion)
    );
    let md = metadata("embassy-nrf");
    assert_eq!(
        TemplateBuilder::new(config(Vendor::St, false, false), &md).err(),
        Some(TemplateError::MissingVersion)
    );
}

#[test]
fn missing_commit_is_reported() {
    let mut md = metadata("embassy-stm32");
    md.commit = None;
    assert_eq!(
        TemplateBuilder::new(config(Vendor::St, false, false), &md).err(),
        Some(TemplateError::MissingCommit)
    );
}

#[test]
fn build_is_deterministic() {
    let a = TemplateBuilder::new(config(Vendor::St, false, true), &metadata("embassy-stm32")).unwrap();
    let b = TemplateBuilder::new(config(Vendor::St, false, true), &metadata("embassy-stm32")).unwrap();
    assert_eq!(a.build(), b.build());
}

#[test]
fn queries_in_order() {
    assert_eq!(
        metadata_queries(&config(Vendor::St, false, false)),
        vec![
            Query::LatestCommit,
            Query::ToolchainChannel,
            Query::ComponentVersion(EmbassyCrates::Executor),
            Query::ComponentVersion(EmbassyCrates::Time),
            Query::ComponentVersion(EmbassyCrates::Sync),
            Query::ComponentVersion(EmbassyCrates::Futures),
            Query::ComponentVersion(EmbassyCrates::Stm32),
        ]
    );
    let q = metadata_queries(&config(Vendor::Rp, true, false));
    assert_eq!(q[0], Query::ToolchainChannel);
    assert_eq!(q.len(), 6);
}

#[test]
fn recorded_answers_fill_metadata() {
    let cfg = config(Vendor::Nrf, false, false);
    let mut md = ResolvedMetadata::empty();
    for (i, q) in metadata_queries(&cfg).into_iter().enumerate() {
        md.record(q, format!("v{}", i));
    }
    assert_eq!(md.commit, Some("v0".to_string()));
    assert_eq!(md.channel, "v1");
    assert_eq!(md.version(EmbassyCrates::Nrf), Some(&"v6".to_string()));
    assert_eq!(md.version(EmbassyCrates::Stm32), None);
    assert!(TemplateBuilder::new(cfg, &md).is_ok());
}

#[test]
fn first_recorded_version_wins() {
    let mut md = ResolvedMetadata::empty();
    md.record(Query::ComponentVersion(EmbassyCrates::Time), "1".to_string());
    md.record(Query::ComponentVersion(EmbassyCrates::Time), "2".to_string());
    assert_eq!(md.version(EmbassyCrates::Time), Some(&"1".to_string()));
}
